//! Text: building, cutting and reading strings.
use vstd::prelude::*;
use vstd::string::StringExecFns;

verus! {

/// `str::eq`: two string slices are equal when they hold the same characters.
pub assume_specification[ <str as PartialEq>::eq ](a: &str, b: &str) -> (r: bool)
    ensures
        r == (a@ == b@),
;

/// `String::push` appends the given character to the end of the string.
pub assume_specification[ String::push ](s: &mut String, c: char)
    ensures
        final(s)@ == old(s)@.push(c),
;

/// The characters with the Unicode property `White_Space`.
pub open spec fn is_space(c: char) -> bool {
    let n = c as u32;
    ||| 0x09 <= n <= 0x0D
    ||| n == 0x20 || n == 0x85 || n == 0xA0 || n == 0x1680
    ||| 0x2000 <= n <= 0x200A
    ||| n == 0x2028 || n == 0x2029 || n == 0x202F || n == 0x205F || n == 0x3000
}

/// `char::is_whitespace` tests the Unicode property `White_Space`, whose
/// characters the Unicode Character Database lists.
#[verifier::external_body]
fn char_is_whitespace(c: char) -> (r: bool)
    ensures
        r == is_space(c),
{
    c.is_whitespace()
}

/// The lowercase form of a text by the Unicode property `Lowercase`.
pub uninterp spec fn lowercase(s: Seq<char>) -> Seq<char>;

/// The lowercase form of an ASCII character.
pub open spec fn ascii_lower(c: char) -> char {
    if 'A' <= c && c <= 'Z' {
        (c as u32 + 32) as char
    } else {
        c
    }
}

/// Whether every character is an ASCII character.
pub open spec fn all_ascii(s: Seq<char>) -> bool {
    forall|i: int| 0 <= i < s.len() ==> #[trigger] s[i] as u32 <= 127
}

/// `str::to_lowercase` maps every character to its lowercase form, which is a
/// function of the text alone. Of an ASCII text it changes the letters `A` to
/// `Z` and nothing else.
#[verifier::external_body]
pub(crate) fn to_lowercase(s: &str) -> (r: String)
    ensures
        r@ == lowercase(s@),
        all_ascii(s@) ==> r@ == s@.map_values(|c: char| ascii_lower(c)),
{
    s.to_lowercase()
}

/// The uppercase form of a text by the Unicode property `Uppercase`.
pub uninterp spec fn uppercase(s: Seq<char>) -> Seq<char>;

/// The uppercase form of an ASCII character.
pub open spec fn ascii_upper(c: char) -> char {
    if 'a' <= c && c <= 'z' {
        (c as u32 - 32) as char
    } else {
        c
    }
}

/// `str::to_uppercase` maps every character to its uppercase form, which is a
/// function of the text alone. Of an ASCII text it changes the letters `a` to
/// `z` and nothing else.
#[verifier::external_body]
pub(crate) fn to_uppercase(s: &str) -> (r: String)
    ensures
        r@ == uppercase(s@),
        all_ascii(s@) ==> r@ == s@.map_values(|c: char| ascii_upper(c)),
{
    s.to_uppercase()
}

/// The characters of several strings.
pub open spec fn texts(v: Seq<String>) -> Seq<Seq<char>> {
    v.map_values(|s: String| s@)
}

/// The characters of a text that may be absent.
pub open spec fn text_opt(s: Option<String>) -> Option<Seq<char>> {
    match s {
        Some(t) => Some(t@),
        None => None,
    }
}

/// Whether two texts are equal.
pub fn same(a: &str, b: &str) -> (r: bool)
    ensures
        r == (a@ == b@),
{
    str::eq(a, b)
}

/// Whether two optional texts are equal.
pub fn same_opt(a: &Option<String>, b: &Option<String>) -> (r: bool)
    ensures
        r == (text_opt(*a) == text_opt(*b)),
{
    match (a, b) {
        (Some(x), Some(y)) => same(x.as_str(), y.as_str()),
        (None, None) => true,
        _ => false,
    }
}

/// A copy of an optional text.
pub fn copy_opt(s: &Option<String>) -> (r: Option<String>)
    ensures
        text_opt(r) == text_opt(*s),
{
    match s {
        Some(t) => Some(t.clone()),
        None => None,
    }
}

/// The characters of a text.
pub fn chars(s: &str) -> (v: Vec<char>)
    ensures
        v@ == s@,
{
    let mut v: Vec<char> = Vec::new();
    for c in it: s.chars()
        invariant
            v@ =~= it.seq().take(it.index() as int),
            it.seq() == s@,
    {
        v.push(c);
    }
    v
}

/// The text made of `v[from..to]`.
pub fn slice_text(v: &[char], from: usize, to: usize) -> (s: String)
    requires
        from <= to <= v@.len(),
    ensures
        s@ == v@.subrange(from as int, to as int),
{
    let mut s = String::new();
    let mut i: usize = from;
    while i < to
        invariant
            from <= i <= to <= v@.len(),
            s@ =~= v@.subrange(from as int, i as int),
        decreases to - i,
    {
        s.push(v[i]);
        i += 1;
    }
    s
}

/// Two texts one after the other.
pub fn cat(a: &str, b: &str) -> (s: String)
    ensures
        s@ == a@ + b@,
{
    let mut s = a.to_owned();
    s.append(b);
    s
}

/// Three texts one after the other.
pub fn cat3(a: &str, b: &str, c: &str) -> (s: String)
    ensures
        s@ == a@ + b@ + c@,
{
    let mut s = a.to_owned();
    s.append(b);
    s.append(c);
    s
}

/// Copies of several texts.
pub fn copy_texts(v: &Vec<String>) -> (r: Vec<String>)
    ensures
        texts(r@) == texts(v@),
{
    let mut r: Vec<String> = Vec::new();
    let mut i: usize = 0;
    while i < v.len()
        invariant
            i <= v@.len(),
            texts(r@) =~= texts(v@).take(i as int),
        decreases v@.len() - i,
    {
        let ghost before = texts(r@);
        r.push(v[i].clone());
        assert(texts(r@) =~= before.push(v@[i as int]@));
        i += 1;
    }
    assert(texts(v@).take(i as int) =~= texts(v@));
    r
}

/// Whether a text is one of several.
pub fn contains_text(v: &Vec<String>, s: &str) -> (r: bool)
    ensures
        r == texts(v@).contains(s@),
{
    let mut i: usize = 0;
    while i < v.len()
        invariant
            i <= v@.len(),
            forall|j: int| 0 <= j < i ==> texts(v@)[j] != s@,
        decreases v@.len() - i,
    {
        if same(v[i].as_str(), s) {
            assert(texts(v@)[i as int] == s@);
            return true;
        }
        i += 1;
    }
    false
}

// ── Searching ──

/// Whether `p` stands at position `i` of `s`.
pub open spec fn occurs_at(s: Seq<char>, p: Seq<char>, i: int) -> bool {
    &&& 0 <= i <= s.len() - p.len()
    &&& s.subrange(i, i + p.len()) == p
}

/// Whether `p` stands anywhere in `s`.
pub open spec fn contains(s: Seq<char>, p: Seq<char>) -> bool {
    exists|i: int| occurs_at(s, p, i)
}

/// Whether `i` is the first position of `p` in `s`.
pub open spec fn first_at(s: Seq<char>, p: Seq<char>, i: int) -> bool {
    &&& occurs_at(s, p, i)
    &&& forall|j: int| 0 <= j < i ==> !occurs_at(s, p, j)
}

/// The first position of `p` in `s`, if there is one.
pub open spec fn find(s: Seq<char>, p: Seq<char>) -> Option<int> {
    if exists|i: int| first_at(s, p, i) {
        Some(choose|i: int| first_at(s, p, i))
    } else {
        None
    }
}

/// The first position of a text is the only first position.
pub proof fn lemma_find(s: Seq<char>, p: Seq<char>, i: int)
    requires
        first_at(s, p, i),
    ensures
        find(s, p) == Some(i),
        contains(s, p),
{
    let k = choose|k: int| first_at(s, p, k);
    assert(first_at(s, p, k));
    if k < i {
        assert(!occurs_at(s, p, k));
    } else if i < k {
        assert(!occurs_at(s, p, i));
    }
}

/// Whether `p` stands at position `i` of `s`.
fn match_at(s: &[char], p: &[char], i: usize) -> (r: bool)
    requires
        i + p@.len() <= s@.len(),
    ensures
        r == occurs_at(s@, p@, i as int),
{
    let len: usize = s.len();
    let mut k: usize = 0;
    while k < p.len()
        invariant
            len == s@.len(),
            k <= p@.len(),
            i + p@.len() <= s@.len(),
            forall|j: int| 0 <= j < k ==> s@[i + j] == p@[j],
        decreases p@.len() - k,
    {
        if s[i + k] != p[k] {
            assert(s@.subrange(i as int, i + p@.len())[k as int] != p@[k as int]);
            return false;
        }
        k += 1;
    }
    assert(s@.subrange(i as int, i + p@.len()) =~= p@);
    true
}

/// The first position of `p` in `s` at or after `from`.
pub fn find_from(s: &[char], p: &[char], from: usize) -> (r: Option<usize>)
    requires
        from <= s@.len(),
    ensures
        match r {
            Some(i) => {
                &&& from <= i
                &&& i + p@.len() <= s@.len()
                &&& occurs_at(s@, p@, i as int)
                &&& forall|j: int| from <= j < i ==> !occurs_at(s@, p@, j)
            },
            None => forall|j: int| from <= j ==> !occurs_at(s@, p@, j),
        },
{
    if p.len() > s.len() {
        return None;
    }
    let last: usize = s.len() - p.len();
    let mut i: usize = from;
    while i <= last
        invariant
            from <= i <= s@.len() + 1,
            last == s@.len() - p@.len(),
            i <= last + 1 || i == from,
            s@.len() <= usize::MAX,
            from <= s@.len(),
            forall|j: int| from <= j < i ==> !occurs_at(s@, p@, j),
        decreases last + 1 - i,
    {
        if match_at(s, p, i) {
            return Some(i);
        }
        if i == last {
            return None;
        }
        i += 1;
    }
    None
}

/// The first position of `p` in `s`.
pub fn find_chars(s: &[char], p: &[char]) -> (r: Option<usize>)
    ensures
        match r {
            Some(i) => find(s@, p@) == Some(i as int) && i + p@.len() <= s@.len(),
            None => find(s@, p@) is None,
        },
        r is Some <==> contains(s@, p@),
{
    let r = find_from(s, p, 0);
    proof {
        match r {
            Some(i) => {
                assert(first_at(s@, p@, i as int));
                lemma_find(s@, p@, i as int);
            },
            None => {
                assert(!contains(s@, p@));
            },
        }
    }
    r
}

/// Whether `p` stands anywhere in `s`.
pub fn str_contains(s: &str, p: &str) -> (r: bool)
    ensures
        r == contains(s@, p@),
{
    let sc = chars(s);
    let pc = chars(p);
    find_chars(sc.as_slice(), pc.as_slice()).is_some()
}

/// Whether a text begins with `p`.
pub fn str_starts_with(s: &str, p: &str) -> (r: bool)
    ensures
        r == p@.is_prefix_of(s@),
{
    let sc = chars(s);
    let pc = chars(p);
    if pc.len() > sc.len() {
        return false;
    }
    let r = match_at(sc.as_slice(), pc.as_slice(), 0);
    assert(s@.subrange(0, p@.len() as int) =~= s@.subrange(0int, 0int + p@.len()));
    r
}

/// The part of a text behind its first `n` characters.
pub fn str_skip(s: &str, n: usize) -> (r: String)
    requires
        n <= s@.len(),
    ensures
        r@ == s@.skip(n as int),
{
    let sc = chars(s);
    let len: usize = sc.len();
    slice_text(sc.as_slice(), n, len)
}

/// The first `n` characters of a text, or all of it when it is shorter.
pub fn str_take(s: &str, n: usize) -> (r: String)
    ensures
        r@ == s@.take(if n <= s@.len() { n as int } else { s@.len() as int }),
{
    let sc = chars(s);
    let to: usize = if n <= sc.len() {
        n
    } else {
        sc.len()
    };
    slice_text(sc.as_slice(), 0, to)
}

/// A text without the slashes at its end.
pub open spec fn without_slashes(s: Seq<char>) -> Seq<char>
    decreases s.len(),
{
    if s.len() > 0 && s.last() == '/' {
        without_slashes(s.drop_last())
    } else {
        s
    }
}

/// Takes the slashes at the end of a text away.
pub fn str_without_slashes(s: &str) -> (r: String)
    ensures
        r@ == without_slashes(s@),
{
    let c = chars(s);
    let mut n: usize = c.len();
    assert(c@.take(n as int) =~= s@);
    while n > 0 && c[n - 1] == '/'
        invariant
            n <= c@.len(),
            without_slashes(c@.take(n as int)) == without_slashes(s@),
        decreases n,
    {
        assert(c@.take(n as int).drop_last() =~= c@.take(n - 1));
        n -= 1;
    }
    let r = slice_text(c.as_slice(), 0, n);
    assert(r@ =~= c@.take(n as int));
    r
}

/// A text with every `a` replaced by `b`.
pub open spec fn replace_char(s: Seq<char>, a: char, b: char) -> Seq<char> {
    s.map_values(|c: char| if c == a { b } else { c })
}

/// Replaces every `a` of a text by `b`.
pub fn str_replace_char(s: &str, a: char, b: char) -> (r: String)
    ensures
        r@ == replace_char(s@, a, b),
{
    let sc = chars(s);
    let mut r = String::new();
    let mut i: usize = 0;
    while i < sc.len()
        invariant
            i <= sc@.len(),
            r@ =~= replace_char(sc@, a, b).take(i as int),
        decreases sc@.len() - i,
    {
        r.push(if sc[i] == a { b } else { sc[i] });
        i += 1;
    }
    assert(replace_char(sc@, a, b).take(i as int) =~= replace_char(sc@, a, b));
    r
}

// ── Cutting ──

/// Position of the first character from `i` on that is no space.
pub open spec fn skip_spaces(s: Seq<char>, i: int) -> int
    decreases s.len() - i,
{
    if 0 <= i < s.len() && is_space(s[i]) {
        skip_spaces(s, i + 1)
    } else {
        i
    }
}

/// Position of the first space from `i` on, or the length of the text.
pub open spec fn word_end(s: Seq<char>, i: int) -> int
    decreases s.len() - i,
{
    if 0 <= i < s.len() && !is_space(s[i]) {
        word_end(s, i + 1)
    } else {
        i
    }
}

/// Position behind the last character before `j` that is no space.
pub open spec fn drop_spaces(s: Seq<char>, j: int) -> int
    decreases j,
{
    if 0 < j <= s.len() && is_space(s[j - 1]) {
        drop_spaces(s, j - 1)
    } else {
        j
    }
}

/// A text without the spaces at its two ends.
pub open spec fn trimmed(s: Seq<char>) -> Seq<char> {
    let from = skip_spaces(s, 0);
    let to = drop_spaces(s, s.len() as int);
    if from < to {
        s.subrange(from, to)
    } else {
        Seq::empty()
    }
}

/// The words of a text from position `i` on.
pub open spec fn words_from(s: Seq<char>, i: int) -> Seq<Seq<char>>
    decreases s.len() - i,
{
    let from = skip_spaces(s, i);
    let to = word_end(s, from);
    if 0 <= i <= from && from < to && to <= s.len() {
        seq![s.subrange(from, to)] + words_from(s, to)
    } else {
        Seq::empty()
    }
}

/// The words of a text: the longest runs without a space.
pub open spec fn words(s: Seq<char>) -> Seq<Seq<char>> {
    words_from(s, 0)
}

fn next_word(s: &[char], i: usize) -> (r: usize)
    requires
        i <= s@.len(),
    ensures
        r == skip_spaces(s@, i as int),
        i <= r <= s@.len(),
        r < s@.len() ==> !is_space(s@[r as int]),
{
    let mut r: usize = i;
    while r < s.len() && char_is_whitespace(s[r])
        invariant
            i <= r <= s@.len(),
            skip_spaces(s@, r as int) == skip_spaces(s@, i as int),
        decreases s@.len() - r,
    {
        r += 1;
    }
    r
}

fn end_of_word(s: &[char], i: usize) -> (r: usize)
    requires
        i <= s@.len(),
    ensures
        r == word_end(s@, i as int),
        i <= r <= s@.len(),
        i < s@.len() && !is_space(s@[i as int]) ==> i < r,
{
    let mut r: usize = i;
    while r < s.len() && !char_is_whitespace(s[r])
        invariant
            i <= r <= s@.len(),
            word_end(s@, r as int) == word_end(s@, i as int),
        decreases s@.len() - r,
    {
        r += 1;
    }
    r
}

/// Cuts the spaces off both ends of a text.
pub fn str_trim(s: &str) -> (r: String)
    ensures
        r@ == trimmed(s@),
{
    let sc = chars(s);
    let from: usize = next_word(sc.as_slice(), 0);
    let mut to: usize = sc.len();
    while to > 0 && char_is_whitespace(sc[to - 1])
        invariant
            to <= sc@.len(),
            drop_spaces(sc@, to as int) == drop_spaces(sc@, sc@.len() as int),
        decreases to,
    {
        to -= 1;
    }
    if from < to {
        slice_text(sc.as_slice(), from, to)
    } else {
        String::new()
    }
}

/// Cuts a text into its words.
pub fn str_words(s: &str) -> (r: Vec<String>)
    ensures
        texts(r@) == words(s@),
{
    let sc = chars(s);
    let mut r: Vec<String> = Vec::new();
    let mut i: usize = 0;
    loop
        invariant
            i <= sc@.len(),
            sc@ == s@,
            texts(r@) + words_from(sc@, i as int) =~= words(s@),
        decreases sc@.len() - i,
    {
        let from: usize = next_word(sc.as_slice(), i);
        let to: usize = end_of_word(sc.as_slice(), from);
        if from >= to {
            return r;
        }
        let word = slice_text(sc.as_slice(), from, to);
        let ghost before = texts(r@);
        r.push(word);
        assert(texts(r@) =~= before.push(word@));
        i = to;
    }
}

/// Position of the first `c` from `i` on, or the length of the text.
pub open spec fn next_char(s: Seq<char>, c: char, i: int) -> int
    decreases s.len() - i,
{
    if 0 <= i < s.len() && s[i] != c {
        next_char(s, c, i + 1)
    } else {
        i
    }
}

/// The pieces of `s` from position `i` on, cut at every `c`.
pub open spec fn split_from(s: Seq<char>, c: char, i: int) -> Seq<Seq<char>>
    decreases s.len() - i,
{
    let to = next_char(s, c, i);
    if 0 <= i <= to < s.len() {
        seq![s.subrange(i, to)] + split_from(s, c, to + 1)
    } else {
        seq![s.subrange(i, s.len() as int)]
    }
}

/// The pieces of a text, cut at every `c`.
pub open spec fn split(s: Seq<char>, c: char) -> Seq<Seq<char>> {
    split_from(s, c, 0)
}

/// A line without the carriage return at its end.
pub open spec fn without_cr(s: Seq<char>) -> Seq<char> {
    if s.len() > 0 && s.last() == '\r' {
        s.drop_last()
    } else {
        s
    }
}

/// The lines of `s` from position `i` on.
pub open spec fn lines_from(s: Seq<char>, i: int) -> Seq<Seq<char>>
    decreases s.len() - i,
{
    let to = next_char(s, '\n', i);
    if 0 <= i <= to < s.len() {
        seq![without_cr(s.subrange(i, to))] + lines_from(s, to + 1)
    } else if 0 <= i < s.len() {
        seq![s.subrange(i, s.len() as int)]
    } else {
        Seq::empty()
    }
}

/// The lines of a text. A line ends with a line feed, or a carriage return
/// and a line feed; the end of the text ends a line too.
pub open spec fn lines(s: Seq<char>) -> Seq<Seq<char>> {
    lines_from(s, 0)
}

fn index_of_char(s: &[char], c: char, i: usize) -> (r: usize)
    requires
        i <= s@.len(),
    ensures
        r == next_char(s@, c, i as int),
        i <= r <= s@.len(),
        r < s@.len() ==> s@[r as int] == c,
{
    let mut r: usize = i;
    while r < s.len() && s[r] != c
        invariant
            i <= r <= s@.len(),
            next_char(s@, c, r as int) == next_char(s@, c, i as int),
        decreases s@.len() - r,
    {
        r += 1;
    }
    r
}

/// Cuts a text at every `c`.
pub fn str_split(s: &str, c: char) -> (r: Vec<String>)
    ensures
        texts(r@) == split(s@, c),
        r@.len() > 0,
{
    let sc = chars(s);
    let mut r: Vec<String> = Vec::new();
    let mut i: usize = 0;
    loop
        invariant
            i <= sc@.len(),
            sc@ == s@,
            texts(r@) + split_from(sc@, c, i as int) =~= split(s@, c),
        decreases sc@.len() - i,
    {
        let len: usize = sc.len();
        let to: usize = index_of_char(sc.as_slice(), c, i);
        let piece = slice_text(sc.as_slice(), i, to);
        let ghost before = texts(r@);
        r.push(piece);
        assert(texts(r@) =~= before.push(piece@));
        if to >= len {
            return r;
        }
        i = to + 1;
    }
}

/// Cuts a text into its lines.
pub fn str_lines(s: &str) -> (r: Vec<String>)
    ensures
        texts(r@) == lines(s@),
{
    let sc = chars(s);
    let len: usize = sc.len();
    let mut r: Vec<String> = Vec::new();
    let mut i: usize = 0;
    while i < len
        invariant
            i <= len,
            len == sc@.len(),
            sc@ == s@,
            texts(r@) + lines_from(sc@, i as int) =~= lines(s@),
        decreases len - i,
    {
        let to: usize = index_of_char(sc.as_slice(), '\n', i);
        let ghost before = texts(r@);
        if to >= len {
            let line = slice_text(sc.as_slice(), i, len);
            r.push(line);
            assert(texts(r@) =~= before.push(line@));
            return r;
        }
        let end: usize = if i < to && sc[to - 1] == '\r' {
            to - 1
        } else {
            to
        };
        let line = slice_text(sc.as_slice(), i, end);
        assert(line@ =~= without_cr(sc@.subrange(i as int, to as int)));
        r.push(line);
        assert(texts(r@) =~= before.push(line@));
        i = to + 1;
    }
    r
}

/// Several texts with a separator between each two.
pub open spec fn joined(v: Seq<Seq<char>>, sep: Seq<char>) -> Seq<char>
    decreases v.len(),
{
    if v.len() == 0 {
        Seq::empty()
    } else if v.len() == 1 {
        v[0]
    } else {
        joined(v.drop_last(), sep) + sep + v.last()
    }
}

/// Joins several texts with a separator.
pub fn str_join(v: &Vec<String>, sep: &str) -> (r: String)
    ensures
        r@ == joined(texts(v@), sep@),
{
    let mut r = String::new();
    let mut i: usize = 0;
    while i < v.len()
        invariant
            i <= v@.len(),
            r@ == joined(texts(v@).take(i as int), sep@),
        decreases v@.len() - i,
    {
        let ghost next = texts(v@).take(i + 1);
        assert(next.drop_last() =~= texts(v@).take(i as int));
        assert(next.last() == v@[i as int]@);
        if i > 0 {
            r.append(sep);
        }
        r.append(v[i].as_str());
        if i == 0 {
            assert(r@ =~= next[0]);
        }
        i += 1;
    }
    assert(texts(v@).take(i as int) =~= texts(v@));
    r
}

// ── Numbers ──

/// The character of a digit below 16, with letters above 9.
pub open spec fn digit_char(d: int, upper: bool) -> char {
    if d < 10 {
        (48 + d) as char
    } else if upper {
        (55 + d) as char
    } else {
        (87 + d) as char
    }
}

/// A number written in decimal.
pub open spec fn decimal(n: nat) -> Seq<char>
    decreases n,
{
    if n < 10 {
        seq![digit_char(n as int, false)]
    } else {
        decimal(n / 10).push(digit_char((n % 10) as int, false))
    }
}

/// An integer written in decimal.
pub open spec fn signed_decimal(n: int) -> Seq<char> {
    if n < 0 {
        seq!['-'] + decimal((-n) as nat)
    } else {
        decimal(n as nat)
    }
}

/// The character of a digit.
pub fn digit(d: u8, upper: bool) -> (c: char)
    requires
        d < 16,
    ensures
        c == digit_char(d as int, upper),
{
    if d < 10 {
        (48 + d) as char
    } else if upper {
        (55 + d) as char
    } else {
        (87 + d) as char
    }
}

/// A 32-bit number as eight hexadecimal digits with capital letters.
pub open spec fn hex8(n: u32) -> Seq<char> {
    Seq::new(8, |i: int| digit_char((n as int / hex_weight(i)) % 16, true))
}

/// The weight of a digit among eight hexadecimal digits.
pub open spec fn hex_weight(i: int) -> int {
    if i == 0 {
        0x1000_0000
    } else if i == 1 {
        0x100_0000
    } else if i == 2 {
        0x10_0000
    } else if i == 3 {
        0x1_0000
    } else if i == 4 {
        0x1000
    } else if i == 5 {
        0x100
    } else if i == 6 {
        0x10
    } else {
        1
    }
}

/// Writes a number as eight hexadecimal digits.
pub fn to_hex8(n: u32) -> (s: String)
    ensures
        s@ == hex8(n),
{
    let mut s = String::new();
    s.push(digit((n / 0x1000_0000 % 16) as u8, true));
    s.push(digit((n / 0x100_0000 % 16) as u8, true));
    s.push(digit((n / 0x10_0000 % 16) as u8, true));
    s.push(digit((n / 0x1_0000 % 16) as u8, true));
    s.push(digit((n / 0x1000 % 16) as u8, true));
    s.push(digit((n / 0x100 % 16) as u8, true));
    s.push(digit((n / 0x10 % 16) as u8, true));
    s.push(digit((n % 16) as u8, true));
    assert(s@ =~= hex8(n));
    s
}

/// Writes a number in decimal.
pub fn to_decimal(n: u64) -> (s: String)
    ensures
        s@ == decimal(n as nat),
    decreases n,
{
    if n < 10 {
        let mut s = String::new();
        s.push(digit(n as u8, false));
        assert(s@ =~= seq![digit_char(n as int, false)]);
        s
    } else {
        let mut s = to_decimal(n / 10);
        s.push(digit((n % 10) as u8, false));
        s
    }
}

/// Writes an integer in decimal.
pub fn to_signed_decimal(n: i64) -> (s: String)
    ensures
        s@ == signed_decimal(n as int),
{
    if n < 0 {
        let s = to_decimal((-(n + 1)) as u64 + 1);
        let r = cat("-", s.as_str());
        proof {
            reveal_strlit("-");
            assert("-"@ =~= seq!['-']);
        }
        r
    } else {
        to_decimal(n as u64)
    }
}

/// The value of a decimal digit.
pub open spec fn digit_value(c: char) -> Option<int> {
    if '0' <= c && c <= '9' {
        Some(c as int - 48)
    } else {
        None
    }
}

/// The value of a text of decimal digits; none when another character is in it.
pub open spec fn digits_value(s: Seq<char>) -> Option<int>
    decreases s.len(),
{
    if s.len() == 0 {
        Some(0)
    } else {
        match (digits_value(s.drop_last()), digit_value(s.last())) {
            (Some(n), Some(d)) => Some(n * 10 + d),
            _ => None,
        }
    }
}

/// The number that a text writes in decimal, up to `max`. A plus sign may
/// stand before the digits, of which there is at least one.
pub open spec fn parsed(s: Seq<char>, max: int) -> Option<int> {
    let digits = s.skip(if s.len() > 0 && s[0] == '+' { 1 } else { 0 });
    if digits.len() == 0 {
        None
    } else {
        match digits_value(digits) {
            Some(n) => if n <= max {
                Some(n)
            } else {
                None
            },
            None => None,
        }
    }
}

proof fn lemma_digits_value_chars(s: Seq<char>, i: int)
    requires
        0 <= i < s.len(),
        digit_value(s[i]) is None,
    ensures
        digits_value(s) is None,
    decreases s.len(),
{
    if i < s.len() - 1 {
        assert(s.drop_last()[i] == s[i]);
        lemma_digits_value_chars(s.drop_last(), i);
    }
}

/// A text with a character that is no digit and no plus sign writes no number.
pub proof fn lemma_parsed_chars(s: Seq<char>, max: int, i: int)
    requires
        0 <= i < s.len(),
        digit_value(s[i]) is None,
        s[i] != '+',
    ensures
        parsed(s, max) is None,
{
    let from: int = if s[0] == '+' { 1 } else { 0 };
    assert(s.skip(from)[i - from] == s[i]);
    lemma_digits_value_chars(s.skip(from), i - from);
}

proof fn lemma_digits_value_mono(s: Seq<char>, i: int)
    requires
        0 <= i <= s.len(),
    ensures
        digits_value(s) is Some ==> digits_value(s.take(i)) is Some && 0 <= digits_value(
            s.take(i),
        )->0 <= digits_value(s)->0,
    decreases s.len() - i,
{
    if i < s.len() {
        lemma_digits_value_mono(s, i + 1);
        assert(s.take(i + 1).drop_last() =~= s.take(i));
    } else {
        assert(s.take(i) =~= s);
        lemma_digits_value_nonneg(s);
    }
    lemma_digits_value_nonneg(s.take(i));
}

proof fn lemma_digits_value_nonneg(s: Seq<char>)
    ensures
        digits_value(s) is Some ==> digits_value(s)->0 >= 0,
    decreases s.len(),
{
    if s.len() > 0 {
        lemma_digits_value_nonneg(s.drop_last());
    }
}

/// The byte that a text gives in decimal, if there is a text and it gives one.
pub open spec fn byte_of(t: Option<String>) -> Option<u8> {
    match t {
        Some(s) => match parsed(s@, 255) {
            Some(n) => Some(n as u8),
            None => None,
        },
        None => None,
    }
}

/// Reads a byte in decimal.
pub fn parse_byte(t: &Option<String>) -> (r: Option<u8>)
    ensures
        r == byte_of(*t),
{
    match t {
        Some(s) => match parse_decimal(s.as_str(), 255) {
            Some(n) => Some(n as u8),
            None => None,
        },
        None => None,
    }
}

/// Reads a decimal number up to `max`.
pub fn parse_decimal(s: &str, max: u64) -> (r: Option<u64>)
    ensures
        match r {
            Some(n) => parsed(s@, max as int) == Some(n as int),
            None => parsed(s@, max as int) is None,
        },
{
    let sc = chars(s);
    let start: usize = if sc.len() > 0 && sc[0] == '+' {
        1
    } else {
        0
    };
    if start >= sc.len() {
        return None;
    }
    let ghost digits = s@.skip(start as int);
    assert(digits.take(0) =~= Seq::<char>::empty());
    let mut n: u64 = 0;
    let mut i: usize = start;
    while i < sc.len()
        invariant
            start <= i <= sc@.len(),
            start == if sc@[0] == '+' { 1int } else { 0 },
            start < sc@.len(),
            sc@ == s@,
            digits == s@.skip(start as int),
            digits_value(digits.take(i - start)) == Some(n as int),
            n <= max,
        decreases sc@.len() - i,
    {
        let c: char = sc[i];
        let ghost next = digits.take(i - start + 1);
        proof {
            assert(next.drop_last() =~= digits.take(i - start));
            assert(next.last() == c);
            lemma_digits_value_mono(digits, i - start + 1);
        }
        if c < '0' || c > '9' {
            return None;
        }
        let d: u64 = (c as u64) - 48;
        if n > (max - (if d <= max { d } else { max })) / 10 || d > max {
            assert(n * 10 + d > max);
            return None;
        }
        n = n * 10 + d;
        i += 1;
    }
    assert(digits.take(i - start) =~= digits);
    Some(n)
}

/// The value of a hexadecimal digit.
pub open spec fn hex_value(c: char) -> Option<int> {
    if '0' <= c && c <= '9' {
        Some(c as int - 48)
    } else if 'a' <= c && c <= 'f' {
        Some(c as int - 87)
    } else if 'A' <= c && c <= 'F' {
        Some(c as int - 55)
    } else {
        None
    }
}

/// The value of a text of hexadecimal digits.
pub open spec fn hex_digits_value(s: Seq<char>) -> Option<int>
    decreases s.len(),
{
    if s.len() == 0 {
        Some(0)
    } else {
        match (hex_digits_value(s.drop_last()), hex_value(s.last())) {
            (Some(n), Some(d)) => Some(n * 16 + d),
            _ => None,
        }
    }
}

/// The number below 65536 that a text writes in hexadecimal. A plus sign may
/// stand before the digits, of which there is at least one.
pub open spec fn parsed_hex16(s: Seq<char>) -> Option<int> {
    let digits = s.skip(if s.len() > 0 && s[0] == '+' { 1 } else { 0 });
    if digits.len() == 0 {
        None
    } else {
        match hex_digits_value(digits) {
            Some(n) => if n <= 65535 {
                Some(n)
            } else {
                None
            },
            None => None,
        }
    }
}

proof fn lemma_hex_mono(s: Seq<char>, i: int)
    requires
        0 <= i <= s.len(),
    ensures
        hex_digits_value(s) is Some ==> hex_digits_value(s.take(i)) is Some && 0
            <= hex_digits_value(s.take(i))->0 <= hex_digits_value(s)->0,
    decreases s.len() - i,
{
    lemma_hex_nonneg(s.take(i));
    if i < s.len() {
        lemma_hex_mono(s, i + 1);
        assert(s.take(i + 1).drop_last() =~= s.take(i));
    } else {
        assert(s.take(i) =~= s);
    }
}

proof fn lemma_hex_nonneg(s: Seq<char>)
    ensures
        hex_digits_value(s) is Some ==> hex_digits_value(s)->0 >= 0,
    decreases s.len(),
{
    if s.len() > 0 {
        lemma_hex_nonneg(s.drop_last());
    }
}

/// Reads a hexadecimal number below 65536.
pub fn parse_hex16(s: &str) -> (r: Option<u16>)
    ensures
        match r {
            Some(n) => parsed_hex16(s@) == Some(n as int),
            None => parsed_hex16(s@) is None,
        },
{
    let sc = chars(s);
    let start: usize = if sc.len() > 0 && sc[0] == '+' {
        1
    } else {
        0
    };
    if start >= sc.len() {
        return None;
    }
    let ghost digits = s@.skip(start as int);
    assert(digits.take(0) =~= Seq::<char>::empty());
    let mut n: u32 = 0;
    let mut i: usize = start;
    while i < sc.len()
        invariant
            start <= i <= sc@.len(),
            start == if sc@[0] == '+' { 1int } else { 0 },
            start < sc@.len(),
            sc@ == s@,
            digits == s@.skip(start as int),
            hex_digits_value(digits.take(i - start)) == Some(n as int),
            n <= 65535,
        decreases sc@.len() - i,
    {
        let c: char = sc[i];
        proof {
            let next = digits.take(i - start + 1);
            assert(next.drop_last() =~= digits.take(i - start));
            assert(next.last() == c);
            lemma_hex_mono(digits, i - start + 1);
        }
        let d: u32 = if '0' <= c && c <= '9' {
            (c as u32) - 48
        } else if 'a' <= c && c <= 'f' {
            (c as u32) - 87
        } else if 'A' <= c && c <= 'F' {
            (c as u32) - 55
        } else {
            return None;
        };
        n = n * 16 + d;
        if n > 65535 {
            return None;
        }
        i += 1;
    }
    assert(digits.take(i - start) =~= digits);
    Some(n as u16)
}

/// Number of times that `p` stands in `s` from position `i` on, without overlap.
pub open spec fn count_from(s: Seq<char>, p: Seq<char>, i: int) -> nat
    decreases s.len() - i,
{
    if i < 0 || i >= s.len() || p.len() == 0 {
        0
    } else if occurs_at(s, p, i) {
        1 + count_from(s, p, i + p.len())
    } else {
        count_from(s, p, i + 1)
    }
}

/// Counts how many times `p` stands in `s`, without overlap.
pub fn count_matches(s: &str, p: &str) -> (n: usize)
    requires
        p@.len() > 0,
    ensures
        n == count_from(s@, p@, 0),
{
    let sc = chars(s);
    let pc = chars(p);
    let len: usize = sc.len();
    let mut n: usize = 0;
    let mut i: usize = 0;
    while i < len
        invariant
            i <= len == sc@.len(),
            sc@ == s@,
            pc@ == p@,
            p@.len() > 0,
            n <= i,
            n + count_from(s@, p@, i as int) == count_from(s@, p@, 0),
        decreases len - i,
    {
        if pc.len() <= len - i && match_at(sc.as_slice(), pc.as_slice(), i) {
            n += 1;
            i += pc.len();
        } else {
            i += 1;
        }
    }
    n
}

// ── Laws ──

/// What a number is written as is read as that number.
pub proof fn lemma_digits_of_decimal(n: nat)
    ensures
        digits_value(decimal(n)) == Some(n as int),
        decimal(n).len() > 0,
        decimal(n)[0] != '+',
        forall|i: int| 0 <= i < decimal(n).len() ==> '0' <= #[trigger] decimal(n)[i] <= '9',
    decreases n,
{
    let d = digit_char((n % 10) as int, false);
    assert(digit_value(d) == Some((n % 10) as int));
    if n >= 10 {
        lemma_digits_of_decimal(n / 10);
        let front = decimal(n / 10);
        assert(front.push(d).drop_last() =~= front);
        assert(front.push(d)[0] == front[0]);
    } else {
        let s = seq![d];
        assert(s.drop_last() =~= Seq::<char>::empty());
        assert(digits_value(Seq::<char>::empty()) == Some(0int));
    }
}

/// Reading gives back what was written: every number up to the limit, written in
/// decimal, is read as itself, and every larger one is refused.
pub proof fn law_decimal_reads_back(n: u64, max: u64, text: String, s: &str, r: Option<u64>)
    requires
        call_ensures(to_decimal, (n,), text),
        s@ == text@,
        call_ensures(parse_decimal, (s, max), r),
    ensures
        r == (if n <= max {
            Some(n)
        } else {
            None
        }),
{
    lemma_digits_of_decimal(n as nat);
    assert(text@.skip(0) =~= text@);
}

/// A number is written with the digits of its value: the last one is the remainder
/// by ten, those before it write the tenth part, and no zero stands in front.
pub proof fn law_decimal_digits(n: u64, text: String)
    requires
        call_ensures(to_decimal, (n,), text),
    ensures
        text@.len() > 0,
        text@.last() as u32 == 48 + n % 10,
        n < 10 ==> text@.len() == 1,
        n >= 10 ==> text@.drop_last() == decimal((n / 10) as nat),
        n > 0 ==> text@[0] != '0',
{
    lemma_no_zero_in_front(n as nat);
    assert(n >= 10 ==> text@.drop_last() =~= decimal((n / 10) as nat));
}

proof fn lemma_no_zero_in_front(n: nat)
    ensures
        decimal(n).len() > 0,
        n > 0 ==> decimal(n)[0] != '0',
    decreases n,
{
    if n >= 10 {
        lemma_no_zero_in_front(n / 10);
    }
}

/// A negative number is written as its amount behind a minus sign.
pub proof fn law_signed_decimal(n: i64, text: String)
    requires
        call_ensures(to_signed_decimal, (n,), text),
    ensures
        n >= 0 ==> text@ == decimal(n as nat),
        n < 0 ==> text@[0] == '-' && text@.skip(1) == decimal((-n) as nat),
{
    if n < 0 {
        assert(text@.skip(1) =~= decimal((-n) as nat));
    }
}

/// Eight hexadecimal digits, each with the value of its four bits: capital letters
/// above nine.
pub proof fn law_hex_digits(n: u32, text: String)
    requires
        call_ensures(to_hex8, (n,), text),
    ensures
        text@.len() == 8,
        hex_value(text@[0]) == Some((n as int / 0x1000_0000) % 16),
        hex_value(text@[1]) == Some((n as int / 0x100_0000) % 16),
        hex_value(text@[2]) == Some((n as int / 0x10_0000) % 16),
        hex_value(text@[3]) == Some((n as int / 0x1_0000) % 16),
        hex_value(text@[4]) == Some((n as int / 0x1000) % 16),
        hex_value(text@[5]) == Some((n as int / 0x100) % 16),
        hex_value(text@[6]) == Some((n as int / 0x10) % 16),
        hex_value(text@[7]) == Some(n as int % 16),
        forall|i: int|
            0 <= i < 8 ==> '0' <= #[trigger] text@[i] <= '9' || 'A' <= text@[i] <= 'F',
{
}

proof fn lemma_skip_spaces(s: Seq<char>, i: int)
    requires
        0 <= i <= s.len(),
    ensures
        i <= skip_spaces(s, i) <= s.len(),
        forall|j: int| i <= j < skip_spaces(s, i) ==> is_space(#[trigger] s[j]),
        skip_spaces(s, i) < s.len() ==> !is_space(s[skip_spaces(s, i)]),
    decreases s.len() - i,
{
    if i < s.len() && is_space(s[i]) {
        lemma_skip_spaces(s, i + 1);
    }
}

proof fn lemma_drop_spaces(s: Seq<char>, j: int)
    requires
        0 <= j <= s.len(),
    ensures
        0 <= drop_spaces(s, j) <= j,
        forall|k: int| drop_spaces(s, j) <= k < j ==> is_space(#[trigger] s[k]),
        drop_spaces(s, j) > 0 ==> !is_space(s[drop_spaces(s, j) - 1]),
    decreases j,
{
    if 0 < j && is_space(s[j - 1]) {
        lemma_drop_spaces(s, j - 1);
    }
}

/// What trimming leaves of a text.
pub proof fn lemma_trimmed(s: Seq<char>)
    ensures
        exists|from: int, to: int|
            {
                &&& 0 <= from <= to <= s.len()
                &&& trimmed(s) == #[trigger] s.subrange(from, to)
                &&& forall|i: int| 0 <= i < from ==> is_space(#[trigger] s[i])
                &&& forall|i: int| to <= i < s.len() ==> is_space(#[trigger] s[i])
            },
        trimmed(s).len() > 0 ==> !is_space(trimmed(s)[0]) && !is_space(trimmed(s).last()),
{
    let from = skip_spaces(s, 0);
    let to = drop_spaces(s, s.len() as int);
    lemma_skip_spaces(s, 0);
    lemma_drop_spaces(s, s.len() as int);
    if from < to {
        assert(trimmed(s) == s.subrange(from, to));
    } else {
        assert(trimmed(s) =~= s.subrange(s.len() as int, s.len() as int));
        assert forall|i: int| 0 <= i < s.len() implies is_space(#[trigger] s[i]) by {
            if i >= from {
                assert(to <= i);
            }
        }
    }
}

/// Trimming cuts spaces off the two ends and nothing else, and all of them.
pub proof fn law_trim(s: &str, r: String)
    requires
        call_ensures(str_trim, (s,), r),
    ensures
        exists|from: int, to: int|
            {
                &&& 0 <= from <= to <= s@.len()
                &&& r@ == #[trigger] s@.subrange(from, to)
                &&& forall|i: int| 0 <= i < from ==> is_space(#[trigger] s@[i])
                &&& forall|i: int| to <= i < s@.len() ==> is_space(#[trigger] s@[i])
            },
        r@.len() > 0 ==> !is_space(r@[0]) && !is_space(r@.last()),
{
    lemma_trimmed(s@);
}

/// The slashes at the end go, all of them, and nothing else does.
pub proof fn law_without_slashes(s: &str, r: String)
    requires
        call_ensures(str_without_slashes, (s,), r),
    ensures
        r@.is_prefix_of(s@),
        r@.len() > 0 ==> r@.last() != '/',
        forall|i: int| r@.len() <= i < s@.len() ==> #[trigger] s@[i] == '/',
{
    lemma_without_slashes(s@);
}

/// What is known of a text without the slashes at its end.
pub proof fn lemma_without_slashes(s: Seq<char>)
    ensures
        without_slashes(s).is_prefix_of(s),
        without_slashes(s).len() > 0 ==> without_slashes(s).last() != '/',
        forall|i: int| without_slashes(s).len() <= i < s.len() ==> #[trigger] s[i] == '/',
    decreases s.len(),
{
    if s.len() > 0 && s.last() == '/' {
        lemma_without_slashes(s.drop_last());
        let r = without_slashes(s);
        assert(s.take(r.len() as int) =~= s.drop_last().take(r.len() as int));
        assert forall|i: int| r.len() <= i < s.len() implies #[trigger] s[i] == '/' by {
            if i < s.len() - 1 {
                assert(s.drop_last()[i] == '/');
            }
        }
    } else {
        assert(s.take(s.len() as int) =~= s);
    }
}

/// What is known of the next place of a character.
pub proof fn lemma_next_char(s: Seq<char>, c: char, i: int)
    requires
        0 <= i <= s.len(),
    ensures
        i <= next_char(s, c, i) <= s.len(),
        forall|j: int| i <= j < next_char(s, c, i) ==> #[trigger] s[j] != c,
        next_char(s, c, i) < s.len() ==> s[next_char(s, c, i)] == c,
    decreases s.len() - i,
{
    if i < s.len() && s[i] != c {
        lemma_next_char(s, c, i + 1);
    }
}

/// Several texts, the first one apart.
pub proof fn lemma_joined_first(v: Seq<Seq<char>>, sep: Seq<char>)
    requires
        v.len() > 1,
    ensures
        joined(v, sep) == v[0] + sep + joined(v.drop_first(), sep),
    decreases v.len(),
{
    let t = v.drop_first();
    if v.len() == 2 {
        assert(v.drop_last() =~= seq![v[0]]);
        assert(t =~= seq![v[1]]);
        assert(joined(seq![v[0]], sep) == v[0]);
        assert(joined(t, sep) == v[1]);
    } else {
        lemma_joined_first(v.drop_last(), sep);
        assert(v.drop_last().drop_first() =~= t.drop_last());
        assert(joined(v, sep) =~= v[0] + sep + joined(t, sep));
    }
}

/// What is known of the pieces of a text from a position on.
pub proof fn lemma_split_from(s: Seq<char>, c: char, i: int)
    requires
        0 <= i <= s.len(),
    ensures
        split_from(s, c, i).len() > 0,
        joined(split_from(s, c, i), seq![c]) == s.skip(i),
        forall|k: int, j: int|
            0 <= k < split_from(s, c, i).len() && 0 <= j < split_from(s, c, i)[k].len()
                ==> #[trigger] split_from(s, c, i)[k][j] != c,
    decreases s.len() - i,
{
    let v = split_from(s, c, i);
    let to = next_char(s, c, i);
    lemma_next_char(s, c, i);
    if to < s.len() {
        let t = split_from(s, c, to + 1);
        lemma_split_from(s, c, to + 1);
        assert(v =~= seq![s.subrange(i, to)] + t);
        assert(v.drop_first() =~= t);
        lemma_joined_first(v, seq![c]);
        assert(s.subrange(i, to) + seq![c] + s.skip(to + 1) =~= s.skip(i));
        assert forall|k: int, j: int|
            0 <= k < v.len() && 0 <= j < v[k].len() implies #[trigger] v[k][j] != c by {
            if k == 0 {
                assert(v[0][j] == s[i + j]);
            } else {
                assert(v[k] == t[k - 1]);
                assert(t[k - 1][j] != c);
            }
        }
    } else {
        assert(s.subrange(i, s.len() as int) =~= s.skip(i));
        assert forall|k: int, j: int|
            0 <= k < v.len() && 0 <= j < v[k].len() implies #[trigger] v[k][j] != c by {
            assert(v[0][j] == s[i + j]);
        }
    }
}

/// The pieces of a text, put together again with the character that it was cut at,
/// are the text, and none of them holds that character.
pub proof fn law_split(s: &str, c: char, r: Vec<String>)
    requires
        call_ensures(str_split, (s, c), r),
    ensures
        joined(texts(r@), seq![c]) == s@,
        forall|k: int, j: int|
            0 <= k < r@.len() && 0 <= j < r@[k]@.len() ==> #[trigger] r@[k]@[j] != c,
{
    lemma_split_from(s@, c, 0);
    assert(s@.skip(0) =~= s@);
    assert forall|k: int, j: int|
        0 <= k < r@.len() && 0 <= j < r@[k]@.len() implies #[trigger] r@[k]@[j] != c by {
        assert(split(s@, c)[k][j] != c);
    }
}

/// Joining puts the texts one after the other: none gives the empty text, one gives
/// itself, and more give the first, the separator and the rest joined.
pub proof fn law_join(v: Vec<String>, sep: &str, r: String)
    requires
        call_ensures(str_join, (&v, sep), r),
    ensures
        v@.len() == 0 ==> r@.len() == 0,
        v@.len() == 1 ==> r@ == v@[0]@,
        v@.len() > 1 ==> r@ == v@[0]@ + sep@ + joined(texts(v@).drop_first(), sep@),
{
    if v@.len() > 1 {
        lemma_joined_first(texts(v@), sep@);
    }
}

proof fn lemma_word_end(s: Seq<char>, i: int)
    requires
        0 <= i <= s.len(),
    ensures
        i <= word_end(s, i) <= s.len(),
        forall|j: int| i <= j < word_end(s, i) ==> !is_space(#[trigger] s[j]),
        word_end(s, i) < s.len() ==> is_space(s[word_end(s, i)]),
    decreases s.len() - i,
{
    if i < s.len() && !is_space(s[i]) {
        lemma_word_end(s, i + 1);
    }
}

/// Whether a text stands in another one as a word: between spaces or the ends, without
/// a space in it.
pub open spec fn word_at(s: Seq<char>, w: Seq<char>, from: int) -> bool {
    let to = from + w.len();
    &&& 0 <= from < to <= s.len()
    &&& w == s.subrange(from, to)
    &&& from == 0 || is_space(s[from - 1])
    &&& to == s.len() || is_space(s[to])
    &&& forall|j: int| from <= j < to ==> !is_space(#[trigger] s[j])
}

/// Whether a text is a word of another one that starts at a position or behind it.
pub open spec fn is_word(s: Seq<char>, w: Seq<char>, i: int) -> bool {
    exists|from: int| i <= from && word_at(s, w, from)
}

proof fn lemma_words_from(s: Seq<char>, i: int)
    requires
        0 <= i <= s.len(),
        i == 0 || i == s.len() || is_space(s[i]),
    ensures
        forall|k: int|
            0 <= k < words_from(s, i).len() ==> is_word(s, #[trigger] words_from(s, i)[k], i),
        forall|from: int, w: Seq<char>|
            i <= from && #[trigger] word_at(s, w, from) ==> words_from(s, i).contains(w),
    decreases s.len() - i,
{
    let a = skip_spaces(s, i);
    lemma_skip_spaces(s, i);
    lemma_word_end(s, a);
    let b = word_end(s, a);
    let v = words_from(s, i);
    if a < b {
        let t = words_from(s, b);
        lemma_words_from(s, b);
        assert(v =~= seq![s.subrange(a, b)] + t);
        assert forall|k: int| 0 <= k < v.len() implies is_word(s, #[trigger] v[k], i) by {
            if k == 0 {
                assert(a == 0 || is_space(s[a - 1]));
                assert(word_at(s, v[0], a));
            } else {
                let w = t[k - 1];
                assert(v[k] == w);
                assert(is_word(s, w, b));
                let from = choose|from: int| b <= from && word_at(s, w, from);
                assert(i <= from && word_at(s, v[k], from));
            }
        }
        assert forall|from: int, w: Seq<char>|
            i <= from && #[trigger] word_at(s, w, from) implies v.contains(w) by {
            if from < b {
                assert(!is_space(s[from]));
                assert(from >= a);
                if from > a {
                    assert(!is_space(s[from - 1]));
                }
                let to = from + w.len();
                if to < b {
                    assert(!is_space(s[to]));
                }
                if to > b {
                    assert(!is_space(s[b]));
                }
                assert(w == v[0]);
            } else {
                assert(t.contains(w));
                let k = t.index_of(w);
                assert(v[k + 1] == w);
            }
        }
    } else {
        assert(a == s.len());
        assert forall|from: int, w: Seq<char>|
            i <= from && #[trigger] word_at(s, w, from) implies v.contains(w) by {
            assert(!is_space(s[from]));
            assert(is_space(s[from]));
        }
    }
}

/// The words of a text are what stands in it between spaces, and all of it.
pub proof fn law_words(s: &str, r: Vec<String>)
    requires
        call_ensures(str_words, (s,), r),
    ensures
        forall|k: int| 0 <= k < r@.len() ==> is_word(s@, (#[trigger] r@[k])@, 0),
        forall|from: int, w: Seq<char>| #[trigger] word_at(s@, w, from) ==> texts(r@).contains(w),
{
    lemma_words_from(s@, 0);
    assert forall|k: int| 0 <= k < r@.len() implies is_word(s@, (#[trigger] r@[k])@, 0) by {
        assert(words(s@)[k] == r@[k]@);
    }
}

proof fn lemma_lines_from(a: Seq<char>, b: Seq<char>, i: int)
    requires
        0 <= i <= b.len(),
    ensures
        lines_from(a + b, a.len() + i) == lines_from(b, i),
    decreases b.len() - i,
{
    let s = a + b;
    let to = next_char(b, '\n', i);
    lemma_next_char(b, '\n', i);
    lemma_shifted_next_char(a, b, i);
    if to < b.len() {
        lemma_lines_from(a, b, to + 1);
        assert(s.subrange(a.len() + i, a.len() + to) =~= b.subrange(i, to));
        assert(lines_from(s, a.len() + i) == seq![
            without_cr(s.subrange(a.len() + i, a.len() + to)),
        ] + lines_from(s, a.len() + to + 1));
    } else if i < b.len() {
        assert(s.subrange(a.len() + i, s.len() as int) =~= b.subrange(i, b.len() as int));
    }
}

proof fn lemma_shifted_next_char(a: Seq<char>, b: Seq<char>, i: int)
    requires
        0 <= i <= b.len(),
    ensures
        next_char(a + b, '\n', a.len() + i) == a.len() + next_char(b, '\n', i),
    decreases b.len() - i,
{
    if i < b.len() {
        assert((a + b)[a.len() + i] == b[i]);
        if b[i] != '\n' {
            lemma_shifted_next_char(a, b, i + 1);
        }
    }
}

/// A line that ends with a line feed, or a carriage return and a line feed, is a line
/// of its own in front of those of the rest; a rest without a line feed is a line.
pub proof fn law_lines(line: Seq<char>, rest: &str, s: &str, all: Vec<String>, tail: Vec<String>, cr: bool)
    requires
        !line.contains('\n'),
        !cr ==> line.len() == 0 || line.last() != '\r',
        s@ == line + (if cr {
            seq!['\r', '\n']
        } else {
            seq!['\n']
        }) + rest@,
        call_ensures(str_lines, (s,), all),
        call_ensures(str_lines, (rest,), tail),
    ensures
        texts(all@) == seq![line] + texts(tail@),
        rest@.len() == 0 ==> tail@.len() == 0,
        rest@.len() > 0 && !rest@.contains('\n') ==> texts(tail@) == seq![rest@],
{
    let ends = if cr {
        seq!['\r', '\n']
    } else {
        seq!['\n']
    };
    let front = line + ends;
    let n = front.len() as int;
    assert(s@ =~= front + rest@);
    lemma_lines_from(front, rest@, 0);
    lemma_next_char(s@, '\n', 0);
    let to = next_char(s@, '\n', 0);
    assert(s@[n - 1] == '\n');
    assert forall|j: int| 0 <= j < n - 1 implies #[trigger] s@[j] != '\n' by {
        if j < line.len() {
            assert(line.contains(line[j]));
        }
    }
    assert(to == n - 1);
    let first = s@.subrange(0, n - 1);
    if cr {
        assert(first =~= line.push('\r'));
        assert(first.drop_last() =~= line);
    } else {
        assert(first =~= line);
    }
    assert(without_cr(first) == line);
    lemma_next_char(rest@, '\n', 0);
    if rest@.len() > 0 && !rest@.contains('\n') {
        let k = next_char(rest@, '\n', 0);
        if k < rest@.len() {
            assert(rest@.contains(rest@[k]));
        }
        assert(rest@.subrange(0, rest@.len() as int) =~= rest@);
    }
    assert(texts(all@) =~= seq![line] + texts(tail@));
}

proof fn lemma_split_shift(a: Seq<char>, b: Seq<char>, c: char, i: int)
    requires
        0 <= i <= b.len(),
    ensures
        next_char(a + b, c, a.len() + i) == a.len() + next_char(b, c, i),
        split_from(a + b, c, a.len() + i) == split_from(b, c, i),
    decreases b.len() - i,
{
    let s = a + b;
    lemma_next_char(b, c, i);
    lemma_next_char(s, c, a.len() + i);
    let to = next_char(b, c, i);
    let there = next_char(s, c, a.len() + i);
    if to < b.len() {
        assert(s[a.len() + to] == c);
        if there < a.len() + to {
            assert(s[there] == b[there - a.len()]);
        }
        assert(there == a.len() + to);
        lemma_split_shift(a, b, c, to + 1);
        assert(s.subrange(a.len() + i, there) =~= b.subrange(i, to));
        assert(split_from(s, c, a.len() + i) == seq![s.subrange(a.len() + i, there)] + split_from(
            s,
            c,
            there + 1,
        ));
    } else {
        if there < s.len() {
            assert(s[there] == b[there - a.len()]);
            assert(b[there - a.len()] != c);
        }
        assert(s.subrange(a.len() + i, s.len() as int) =~= b.subrange(i, b.len() as int));
    }
}

/// A piece in front of a text that is cut.
pub proof fn lemma_split_first(piece: Seq<char>, c: char, rest: Seq<char>)
    requires
        !piece.contains(c),
    ensures
        split(piece + seq![c] + rest, c) == seq![piece] + split(rest, c),
        split(piece, c) == seq![piece],
{
    let front = piece + seq![c];
    let s = front + rest;
    lemma_next_char(s, c, 0);
    lemma_next_char(piece, c, 0);
    let to = next_char(s, c, 0);
    assert(s[piece.len() as int] == c);
    if to < piece.len() {
        assert(s[to] == piece[to]);
        assert(piece.contains(piece[to]));
    }
    assert(to == piece.len());
    lemma_split_shift(front, rest, c, 0);
    assert(s.subrange(0, to) =~= piece);
    let end = next_char(piece, c, 0);
    if end < piece.len() {
        assert(piece.contains(piece[end]));
    }
    assert(piece.subrange(0, piece.len() as int) =~= piece);
}

/// How many digits a number has, and which, up to 999.
pub proof fn lemma_short_decimal(n: nat)
    ensures
        n < 10 ==> decimal(n) == seq![(48 + n) as char],
        10 <= n < 100 ==> decimal(n) == seq![(48 + n / 10) as char, (48 + n % 10) as char],
        100 <= n < 1000 ==> decimal(n) == seq![
            (48 + n / 100) as char,
            (48 + n / 10 % 10) as char,
            (48 + n % 10) as char,
        ],
        n >= 1000 ==> decimal(n).len() > 3,
    decreases n,
{
    if n >= 10 {
        lemma_short_decimal(n / 10);
        if n < 100 {
            assert(decimal(n) =~= seq![(48 + n / 10) as char, (48 + n % 10) as char]);
        } else if n < 1000 {
            assert(n / 10 / 10 == n / 100);
            assert(decimal(n) =~= seq![
                (48 + n / 100) as char,
                (48 + n / 10 % 10) as char,
                (48 + n % 10) as char,
            ]);
        } else {
            assert(decimal(n / 10).len() >= 3);
        }
    }
}

/// A text that stands in another one has a first place there, which is where it is found.
pub proof fn lemma_find_first(s: Seq<char>, p: Seq<char>)
    ensures
        contains(s, p) ==> find(s, p) is Some && first_at(s, p, find(s, p)->0),
        !contains(s, p) ==> find(s, p) is None,
{
    if contains(s, p) {
        let k = choose|k: int| occurs_at(s, p, k);
        lemma_first_place(s, p, 0, k);
    } else if exists|i: int| first_at(s, p, i) {
        let i = choose|i: int| first_at(s, p, i);
        assert(occurs_at(s, p, i));
    }
}

proof fn lemma_first_place(s: Seq<char>, p: Seq<char>, i: int, k: int)
    requires
        0 <= i <= k,
        occurs_at(s, p, k),
        forall|j: int| 0 <= j < i ==> !occurs_at(s, p, j),
    ensures
        exists|f: int| first_at(s, p, f),
    decreases k - i,
{
    if occurs_at(s, p, i) {
        assert(first_at(s, p, i));
    } else {
        lemma_first_place(s, p, i + 1, k);
    }
}

/// Reading a number goes digit by digit: a text with a digit more is ten times as much and
/// the digit, as long as that is not over the limit; no text with another character behind
/// it is a number. The first character may be a plus sign, which changes nothing.
pub proof fn law_reading_numbers(
    s: &str,
    longer: &str,
    max: u64,
    c: char,
    r: Option<u64>,
    q: Option<u64>,
)
    requires
        call_ensures(parse_decimal, (s, max), r),
        call_ensures(parse_decimal, (longer, max), q),
        longer@ == s@.push(c),
        s@.len() > 0 && s@ != seq!['+'],
    ensures
        r matches Some(n) ==> n <= max,
        '0' <= c <= '9' ==> (r matches Some(n) ==> (n * 10 + (c as int - 48) <= max ==> q == Some(
            (n * 10 + (c as int - 48)) as u64,
        ))),
        '0' <= c <= '9' ==> (r matches Some(n) ==> (n * 10 + (c as int - 48) > max ==> q is None)),
        r is None ==> q is None,
        !('0' <= c <= '9') ==> q is None,
{
    let start = if s@[0] == '+' {
        1int
    } else {
        0
    };
    if s@.len() == 1 && s@[0] == '+' {
        assert(s@ =~= seq!['+']);
    }
    let d = s@.skip(start);
    assert(longer@[0] == s@[0]);
    assert(longer@.skip(start) =~= d.push(c));
    assert(d.push(c).drop_last() =~= d);
    lemma_digits_value_nonneg(d);
}

/// A text without a digit is no number, a digit is itself, and a plus sign in front of
/// another text changes nothing.
pub proof fn law_reading_digits(
    s: &str,
    max: u64,
    r: Option<u64>,
    signed: &str,
    q: Option<u64>,
)
    requires
        call_ensures(parse_decimal, (s, max), r),
        call_ensures(parse_decimal, (signed, max), q),
        signed@ == seq!['+'] + s@,
    ensures
        s@.len() == 0 || s@ == seq!['+'] ==> r is None,
        s@.len() == 1 && '0' <= s@[0] <= '9' && s@[0] as int - 48 <= max ==> r == Some(
            (s@[0] as int - 48) as u64,
        ),
        s@.len() > 0 && s@[0] != '+' ==> q == r,
{
    assert(signed@.skip(1) =~= s@);
    assert(s@.skip(0) =~= s@);
    if s@ == seq!['+'] {
        assert(s@[0] == '+');
        assert(s@.skip(1).len() == 0);
    }
    if s@.len() == 1 {
        assert(s@.drop_last() =~= Seq::<char>::empty());
        assert(digits_value(s@.drop_last()) == Some(0int));
        assert(s@.last() == s@[0]);
    }
}

/// Reading a hexadecimal number goes digit by digit: a digit more is sixteen times as much
/// and the digit, below 65536, and no text with another character behind it is a number.
pub proof fn law_reading_hex(
    s: &str,
    longer: &str,
    c: char,
    r: Option<u16>,
    q: Option<u16>,
)
    requires
        call_ensures(parse_hex16, (s,), r),
        call_ensures(parse_hex16, (longer,), q),
        longer@ == s@.push(c),
        s@.len() > 0 && s@ != seq!['+'],
    ensures
        ({
            let d = if '0' <= c <= '9' {
                c as int - 48
            } else if 'a' <= c <= 'f' {
                c as int - 87
            } else if 'A' <= c <= 'F' {
                c as int - 55
            } else {
                -1
            };
            &&& d < 0 ==> q is None
            &&& r is None ==> q is None
            &&& d >= 0 ==> (r matches Some(n) ==> (n * 16 + d < 65536 ==> q == Some(
                (n * 16 + d) as u16,
            )))
            &&& d >= 0 ==> (r matches Some(n) ==> (n * 16 + d >= 65536 ==> q is None))
            &&& s@.len() == 1 && '0' <= s@[0] <= '9' ==> r == Some((s@[0] as int - 48) as u16)
            &&& s@.len() == 1 && 'a' <= s@[0] <= 'f' ==> r == Some((s@[0] as int - 87) as u16)
            &&& s@.len() == 1 && 'A' <= s@[0] <= 'F' ==> r == Some((s@[0] as int - 55) as u16)
        }),
{
    let start = if s@[0] == '+' {
        1int
    } else {
        0
    };
    if s@.len() == 1 && s@[0] == '+' {
        assert(s@ =~= seq!['+']);
    }
    let d = s@.skip(start);
    assert(longer@[0] == s@[0]);
    assert(longer@.skip(start) =~= d.push(c));
    assert(d.push(c).drop_last() =~= d);
    lemma_hex_nonneg(d);
    if s@.len() == 1 {
        assert(d.drop_last() =~= Seq::<char>::empty());
        assert(hex_digits_value(d.drop_last()) == Some(0int));
        assert(d.last() == s@[0]);
    }
}

/// The small operations on texts: what is put together, taken apart, copied, compared and
/// replaced, character by character.
pub proof fn law_pieces(
    a: &str,
    b: &str,
    c: &str,
    ab: String,
    abc: String,
    n: usize,
    front: String,
    back: String,
    i: int,
)
    requires
        call_ensures(cat, (a, b), ab),
        call_ensures(cat3, (a, b, c), abc),
        n <= a@.len(),
        call_ensures(str_take, (a, n), front),
        call_ensures(str_skip, (a, n), back),
    ensures
        ab@.len() == a@.len() + b@.len(),
        0 <= i < a@.len() ==> ab@[i] == a@[i],
        0 <= i < b@.len() ==> ab@[a@.len() + i] == b@[i],
        abc@ == ab@ + c@,
        front@.len() == n,
        front@ + back@ == a@,
{
    assert(front@ + back@ =~= a@);
}

/// A text is found where it stands: it begins a text that it stands at the front of, and is
/// contained in every text that it stands in.
pub proof fn law_found_texts(
    front: Seq<char>,
    p: &str,
    rest: Seq<char>,
    s: &str,
    inside: bool,
    begins: bool,
    equal: bool,
)
    requires
        call_ensures(str_contains, (s, p), inside),
        call_ensures(str_starts_with, (s, p), begins),
        call_ensures(same, (s, p), equal),
    ensures
        s@ == front + p@ + rest ==> inside,
        s@ == p@ + rest ==> begins,
        begins ==> p@ + s@.skip(p@.len() as int) == s@,
        inside ==> exists|i: int|
            0 <= i && i + p@.len() <= s@.len() && #[trigger] s@.subrange(i, i + p@.len()) == p@,
        equal <==> s@ == p@,
        begins ==> inside,
{
    if s@ == front + p@ + rest {
        let i = front.len() as int;
        assert(s@.subrange(i, i + p@.len()) =~= p@);
        assert(occurs_at(s@, p@, i));
    }
    if s@ == p@ + rest {
        assert(p@.is_prefix_of(s@));
    }
    if begins {
        assert(p@ + s@.skip(p@.len() as int) =~= s@);
        assert(s@.subrange(0, p@.len() as int) =~= p@);
        assert(occurs_at(s@, p@, 0));
    }
    if inside {
        let i = choose|i: int| occurs_at(s@, p@, i);
        assert(s@.subrange(i, i + p@.len()) == p@);
    }
}

/// Replacing a character changes it wherever it stands, and no other.
pub proof fn law_replaced_characters(s: &str, a: char, b: char, r: String, i: int)
    requires
        call_ensures(str_replace_char, (s, a, b), r),
    ensures
        r@.len() == s@.len(),
        0 <= i < s@.len() && s@[i] == a ==> r@[i] == b,
        0 <= i < s@.len() && s@[i] != a ==> r@[i] == s@[i],
{
}

/// Copies hold what the originals hold, and a list contains the texts that are in it.
pub proof fn law_copied_texts(
    v: Vec<String>,
    w: Vec<String>,
    s: &str,
    inside: bool,
    o: Option<String>,
    p: Option<String>,
    equal: bool,
    i: int,
)
    requires
        call_ensures(copy_texts, (&v,), w),
        call_ensures(contains_text, (&v, s), inside),
        call_ensures(copy_opt, (&o,), p),
        call_ensures(same_opt, (&o, &p), equal),
    ensures
        w@.len() == v@.len(),
        0 <= i < v@.len() ==> w@[i]@ == v@[i]@,
        0 <= i < v@.len() && v@[i]@ == s@ ==> inside,
        inside ==> exists|k: int| 0 <= k < v@.len() && (#[trigger] v@[k])@ == s@,
        o is Some <==> p is Some,
        o matches Some(t) ==> (p matches Some(u) && u@ == t@),
        equal,
{
    assert(texts(v@).len() == v@.len() && texts(w@).len() == w@.len());
    if 0 <= i < v@.len() {
        assert(texts(v@)[i] == v@[i]@ && texts(w@)[i] == w@[i]@);
    }
    if inside {
        let k = texts(v@).index_of(s@);
        assert(texts(v@)[k] == v@[k]@);
        assert(v@[k]@ == s@);
    }
}

/// A byte is read from the decimal text of a number up to 255; there is none without a
/// text, and none of a larger number.
pub proof fn law_read_byte(t: Option<String>, r: Option<u8>, n: nat)
    requires
        call_ensures(parse_byte, (&t,), r),
    ensures
        t is None ==> r is None,
        t matches Some(s) && s@ == decimal(n) && n <= 255 ==> r == Some(n as u8),
        t matches Some(s) && s@ == decimal(n) && n > 255 ==> r is None,
{
    lemma_digits_of_decimal(n);
    assert(decimal(n).skip(0) =~= decimal(n));
}

/// Letters in lower and in upper case are 32 apart, and nothing else has a case.
pub proof fn law_letter_cases(c: char)
    ensures
        'A' <= c <= 'Z' ==> ascii_lower(c) as int == c as int + 32 && ascii_upper(ascii_lower(c))
            == c,
        'a' <= c <= 'z' ==> ascii_upper(c) as int == c as int - 32 && ascii_lower(ascii_upper(c))
            == c,
        !('A' <= c <= 'Z') ==> ascii_lower(c) == c,
        !('a' <= c <= 'z') ==> ascii_upper(c) == c,
{
}

proof fn lemma_count_shift(a: Seq<char>, b: Seq<char>, p: Seq<char>, i: int)
    requires
        0 <= i,
        p.len() > 0,
    ensures
        count_from(a + b, p, a.len() + i) == count_from(b, p, i),
    decreases b.len() - i,
{
    let s = a + b;
    if i < b.len() {
        let j = a.len() + i;
        if i + p.len() <= b.len() {
            assert(s.subrange(j, j + p.len()) =~= b.subrange(i, i + p.len()));
        }
        assert(occurs_at(s, p, j) == occurs_at(b, p, i));
        if occurs_at(b, p, i) {
            lemma_count_shift(a, b, p, i + p.len());
        } else {
            lemma_count_shift(a, b, p, i + 1);
        }
    }
}

/// How often a text stands in another one: once more than in the rest where it stands at
/// the front, and as often as in the rest behind a character where it does not. Matches do
/// not overlap, and nothing stands in the empty text.
pub proof fn law_counted_matches(
    front: Seq<char>,
    rest: &str,
    s: &str,
    p: &str,
    n: usize,
    m: usize,
)
    requires
        p@.len() > 0,
        s@ == front + rest@,
        call_ensures(count_matches, (s, p), n),
        call_ensures(count_matches, (rest, p), m),
    ensures
        front == p@ ==> n == m + 1,
        front.len() == 1 && !p@.is_prefix_of(s@) ==> n == m,
        s@.len() == 0 ==> n == 0,
{
    lemma_count_shift(front, rest@, p@, 0);
    if front == p@ {
        assert(s@.subrange(0, p@.len() as int) =~= p@);
        assert(occurs_at(s@, p@, 0));
    }
    if front.len() == 1 && !p@.is_prefix_of(s@) {
        if occurs_at(s@, p@, 0) {
            assert(p@ =~= s@.subrange(0, p@.len() as int));
        }
    }
}

} // verus!
