//! Character classes and low-level text scanning used by the grammar.
//!
//! All text is modelled as `Seq<char>`; executable code works on `Vec<char>`
//! and converts to and from `String` at the library boundary.

use vstd::prelude::*;

verus! {

/// Blank characters: the ASCII whitespace set the grammar treats as blank.
pub open spec fn is_blank(c: char) -> bool {
    c == ' ' || c == '\t' || c == '\n' || c == '\r' || c == '\u{b}' || c == '\u{c}'
}

/// Word characters: ASCII letters, digits and the underscore.
pub open spec fn is_word(c: char) -> bool {
    ('a' as u32 <= c as u32 && c as u32 <= 'z' as u32)
        || ('A' as u32 <= c as u32 && c as u32 <= 'Z' as u32)
        || ('0' as u32 <= c as u32 && c as u32 <= '9' as u32)
        || c == '_'
}

/// Decimal digits.
pub open spec fn is_digit(c: char) -> bool {
    '0' as u32 <= c as u32 && c as u32 <= '9' as u32
}

/// Characters allowed inside a parenthesized scope group.
pub open spec fn is_scope_char(c: char) -> bool {
    is_word(c) || c == ' ' || c == '/' || c == '.' || c == ',' || c == '-'
}

pub fn blank_char(c: char) -> (r: bool)
    ensures
        r == is_blank(c),
{
    c == ' ' || c == '\t' || c == '\n' || c == '\r' || c == '\u{b}' || c == '\u{c}'
}

pub fn word_char(c: char) -> (r: bool)
    ensures
        r == is_word(c),
{
    let u = c as u32;
    (97 <= u && u <= 122) || (65 <= u && u <= 90) || (48 <= u && u <= 57) || c == '_'
}

pub fn digit_char(c: char) -> (r: bool)
    ensures
        r == is_digit(c),
{
    let u = c as u32;
    48 <= u && u <= 57
}

pub fn scope_char(c: char) -> (r: bool)
    ensures
        r == is_scope_char(c),
{
    word_char(c) || c == ' ' || c == '/' || c == '.' || c == ',' || c == '-'
}

/// End of the run of blank characters that starts at `i`.
pub open spec fn blanks_end(s: Seq<char>, i: int) -> int
    decreases s.len() - i,
{
    if i < 0 || i >= s.len() {
        i
    } else if is_blank(s[i]) {
        blanks_end(s, i + 1)
    } else {
        i
    }
}

/// End of the run of space characters (' ' only) that starts at `i`.
pub open spec fn spaces_end(s: Seq<char>, i: int) -> int
    decreases s.len() - i,
{
    if i < 0 || i >= s.len() {
        i
    } else if s[i] == ' ' {
        spaces_end(s, i + 1)
    } else {
        i
    }
}

/// End of the run of word characters that starts at `i`.
pub open spec fn word_end(s: Seq<char>, i: int) -> int
    decreases s.len() - i,
{
    if i < 0 || i >= s.len() {
        i
    } else if is_word(s[i]) {
        word_end(s, i + 1)
    } else {
        i
    }
}

/// End of the run of scope characters that starts at `i`.
pub open spec fn scope_end(s: Seq<char>, i: int) -> int
    decreases s.len() - i,
{
    if i < 0 || i >= s.len() {
        i
    } else if is_scope_char(s[i]) {
        scope_end(s, i + 1)
    } else {
        i
    }
}

/// End of the run of digit characters that starts at `i`.
pub open spec fn digits_end(s: Seq<char>, i: int) -> int
    decreases s.len() - i,
{
    if i < 0 || i >= s.len() {
        i
    } else if is_digit(s[i]) {
        digits_end(s, i + 1)
    } else {
        i
    }
}

pub proof fn lemma_blanks_end(s: Seq<char>, i: int)
    requires
        0 <= i <= s.len(),
    ensures
        i <= blanks_end(s, i) <= s.len(),
        forall|j: int| i <= j < blanks_end(s, i) ==> is_blank(s[j]),
        blanks_end(s, i) < s.len() ==> !is_blank(s[blanks_end(s, i)]),
    decreases s.len() - i,
{
    if i < s.len() && is_blank(s[i]) {
        lemma_blanks_end(s, i + 1);
    }
}

pub proof fn lemma_word_end(s: Seq<char>, i: int)
    requires
        0 <= i <= s.len(),
    ensures
        i <= word_end(s, i) <= s.len(),
        forall|j: int| i <= j < word_end(s, i) ==> is_word(s[j]),
        word_end(s, i) < s.len() ==> !is_word(s[word_end(s, i)]),
    decreases s.len() - i,
{
    if i < s.len() && is_word(s[i]) {
        lemma_word_end(s, i + 1);
    }
}

pub proof fn lemma_digits_end(s: Seq<char>, i: int)
    requires
        0 <= i <= s.len(),
    ensures
        i <= digits_end(s, i) <= s.len(),
        forall|j: int| i <= j < digits_end(s, i) ==> is_digit(s[j]),
        digits_end(s, i) < s.len() ==> !is_digit(s[digits_end(s, i)]),
    decreases s.len() - i,
{
    if i < s.len() && is_digit(s[i]) {
        lemma_digits_end(s, i + 1);
    }
}

pub fn scan_blanks(v: &Vec<char>, from: usize) -> (r: usize)
    requires
        from <= v@.len(),
    ensures
        r == blanks_end(v@, from as int),
        from <= r <= v@.len(),
{
    let mut i = from;
    while i < v.len() && blank_char(v[i])
        invariant
            from <= i <= v@.len(),
            blanks_end(v@, from as int) == blanks_end(v@, i as int),
        decreases v@.len() - i,
    {
        i = i + 1;
    }
    i
}

pub fn scan_spaces(v: &Vec<char>, from: usize) -> (r: usize)
    requires
        from <= v@.len(),
    ensures
        r == spaces_end(v@, from as int),
        from <= r <= v@.len(),
{
    let mut i = from;
    while i < v.len() && v[i] == ' '
        invariant
            from <= i <= v@.len(),
            spaces_end(v@, from as int) == spaces_end(v@, i as int),
        decreases v@.len() - i,
    {
        i = i + 1;
    }
    i
}

pub fn scan_word(v: &Vec<char>, from: usize) -> (r: usize)
    requires
        from <= v@.len(),
    ensures
        r == word_end(v@, from as int),
        from <= r <= v@.len(),
{
    let mut i = from;
    while i < v.len() && word_char(v[i])
        invariant
            from <= i <= v@.len(),
            word_end(v@, from as int) == word_end(v@, i as int),
        decreases v@.len() - i,
    {
        i = i + 1;
    }
    i
}

pub fn scan_scope(v: &Vec<char>, from: usize) -> (r: usize)
    requires
        from <= v@.len(),
    ensures
        r == scope_end(v@, from as int),
        from <= r <= v@.len(),
{
    let mut i = from;
    while i < v.len() && scope_char(v[i])
        invariant
            from <= i <= v@.len(),
            scope_end(v@, from as int) == scope_end(v@, i as int),
        decreases v@.len() - i,
    {
        i = i + 1;
    }
    i
}

pub fn scan_digits(v: &Vec<char>, from: usize) -> (r: usize)
    requires
        from <= v@.len(),
    ensures
        r == digits_end(v@, from as int),
        from <= r <= v@.len(),
{
    let mut i = from;
    while i < v.len() && digit_char(v[i])
        invariant
            from <= i <= v@.len(),
            digits_end(v@, from as int) == digits_end(v@, i as int),
        decreases v@.len() - i,
    {
        i = i + 1;
    }
    i
}

/// Start of the run of blank characters that ends at `e` (walking left).
pub open spec fn rblanks_begin(s: Seq<char>, e: int) -> int
    decreases e,
{
    if e <= 0 || e > s.len() {
        e
    } else if is_blank(s[e - 1]) {
        rblanks_begin(s, e - 1)
    } else {
        e
    }
}

pub proof fn lemma_rblanks_begin(s: Seq<char>, e: int)
    requires
        0 <= e <= s.len(),
    ensures
        0 <= rblanks_begin(s, e) <= e,
        forall|j: int| rblanks_begin(s, e) <= j < e ==> is_blank(s[j]),
        rblanks_begin(s, e) > 0 ==> !is_blank(s[rblanks_begin(s, e) - 1]),
    decreases e,
{
    if e > 0 && is_blank(s[e - 1]) {
        lemma_rblanks_begin(s, e - 1);
    }
}

/// A copy of the characters of `s` with leading and trailing blanks removed.
pub open spec fn trim_spec(s: Seq<char>) -> Seq<char> {
    let a = blanks_end(s, 0);
    let b = rblanks_begin(s, s.len() as int);
    if a < b {
        s.subrange(a, b)
    } else {
        Seq::empty()
    }
}

/// The characters `v[a..b]` as a fresh vector.
pub fn copy_range(v: &Vec<char>, a: usize, b: usize) -> (r: Vec<char>)
    requires
        a <= b <= v@.len(),
    ensures
        r@ == v@.subrange(a as int, b as int),
{
    let mut r: Vec<char> = Vec::new();
    let mut i = a;
    while i < b
        invariant
            a <= i <= b <= v@.len(),
            r@ == v@.subrange(a as int, i as int),
        decreases b - i,
    {
        r.push(v[i]);
        proof {
            assert(r@ =~= v@.subrange(a as int, i as int + 1));
        }
        i = i + 1;
    }
    r
}

/// Removes leading and trailing blanks.
pub fn trim(v: &Vec<char>) -> (r: Vec<char>)
    ensures
        r@ == trim_spec(v@),
{
    let a = scan_blanks(v, 0);
    let mut b = v.len();
    while b > 0 && blank_char(v[b - 1])
        invariant
            0 <= b <= v@.len(),
            rblanks_begin(v@, v@.len() as int) == rblanks_begin(v@, b as int),
        decreases b,
    {
        b = b - 1;
    }
    if a < b {
        copy_range(v, a, b)
    } else {
        Vec::new()
    }
}

/// The characters of `s`, in order, as a vector.
pub fn chars_of(s: &str) -> (v: Vec<char>)
    ensures
        v@ == s@,
{
    let n = s.unicode_len();
    let mut v: Vec<char> = Vec::new();
    let mut i: usize = 0;
    while i < n
        invariant
            i <= n == s@.len(),
            v@ == s@.take(i as int),
        decreases n - i,
    {
        v.push(s.get_char(i));
        proof {
            assert(v@ =~= s@.take(i as int + 1));
        }
        i = i + 1;
    }
    proof {
        assert(s@.take(n as int) =~= s@);
    }
    v
}

/// Relies on `String`'s `FromIterator<char>`: collecting characters yields a
/// string holding exactly those characters in order.
#[verifier::external_body]
pub fn string_from_chars(v: &Vec<char>) -> (s: String)
    ensures
        s@ == v@,
{
    v.iter().collect()
}

/// The first index at or after `i` holding `c`, or the length when absent.
pub open spec fn find_char(s: Seq<char>, c: char, i: int) -> int
    decreases s.len() - i,
{
    if i < 0 || i >= s.len() {
        s.len() as int
    } else if s[i] == c {
        i
    } else {
        find_char(s, c, i + 1)
    }
}

pub proof fn lemma_find_char(s: Seq<char>, c: char, i: int)
    requires
        0 <= i <= s.len(),
    ensures
        i <= find_char(s, c, i) <= s.len(),
        find_char(s, c, i) < s.len() ==> s[find_char(s, c, i)] == c,
        forall|j: int| i <= j < find_char(s, c, i) ==> s[j] != c,
    decreases s.len() - i,
{
    if i < s.len() && s[i] != c {
        lemma_find_char(s, c, i + 1);
    }
}

/// The last index before `e` holding `c`, or `-1` when absent.
pub open spec fn rfind_char(s: Seq<char>, c: char, e: int) -> int
    decreases e,
{
    if e <= 0 || e > s.len() {
        -1
    } else if s[e - 1] == c {
        e - 1
    } else {
        rfind_char(s, c, e - 1)
    }
}

/// The first index at or after `i` of `v` holding `c`, or the length.
pub fn scan_to_char(v: &Vec<char>, c: char, from: usize) -> (r: usize)
    requires
        from <= v@.len(),
    ensures
        r == find_char(v@, c, from as int),
        from <= r <= v@.len(),
{
    let mut i = from;
    while i < v.len() && v[i] != c
        invariant
            from <= i <= v@.len(),
            find_char(v@, c, from as int) == find_char(v@, c, i as int),
        decreases v@.len() - i,
    {
        i = i + 1;
    }
    i
}

/// The last index of `v` before `e` holding `c`, or `None` when absent.
pub fn scan_back_to_char(v: &Vec<char>, c: char, e: usize) -> (r: Option<usize>)
    requires
        e <= v@.len(),
    ensures
        match r {
            Some(j) => j == rfind_char(v@, c, e as int) && j < e,
            None => rfind_char(v@, c, e as int) == -1,
        },
{
    let mut i = e;
    while i > 0 && v[i - 1] != c
        invariant
            0 <= i <= e <= v@.len(),
            rfind_char(v@, c, e as int) == rfind_char(v@, c, i as int),
        decreases i,
    {
        i = i - 1;
    }
    if i > 0 {
        Some(i - 1)
    } else {
        None
    }
}

/// The comma-separated pieces of `s` from position `start` on.
pub open spec fn split_from(s: Seq<char>, start: int) -> Seq<Seq<char>>
    decreases s.len() - start,
        when 0 <= start <= s.len()
        via split_from_dec
{
    let i = find_char(s, ',', start);
    if i >= s.len() {
        seq![s.subrange(start, s.len() as int)]
    } else {
        seq![s.subrange(start, i)] + split_from(s, i + 1)
    }
}

#[via_fn]
proof fn split_from_dec(s: Seq<char>, start: int) {
    lemma_find_char(s, ',', start);
}

/// The views of a sequence of character vectors.
pub open spec fn views(vs: Seq<Vec<char>>) -> Seq<Seq<char>> {
    vs.map_values(|v: Vec<char>| v@)
}

/// Pushing a vector onto a list pushes its view onto the list's views.
pub proof fn lemma_views_push(vs: Seq<Vec<char>>, v: Vec<char>)
    ensures
        views(vs.push(v)) == views(vs).push(v@),
{
    assert forall|j: int| 0 <= j < vs.len() + 1 implies views(vs.push(v))[j] == views(vs).push(
        v@,
    )[j] by {
        assert(views(vs.push(v))[j] == vs.push(v)[j]@);
        if j < vs.len() {
            assert(vs.push(v)[j] == vs[j]);
            assert(views(vs)[j] == vs[j]@);
        }
    }
    assert(views(vs.push(v)) =~= views(vs).push(v@));
}

/// Splits `v` at commas; the pieces keep their surrounding blanks.
pub fn split_commas(v: &Vec<char>) -> (r: Vec<Vec<char>>)
    ensures
        views(r@) == split_from(v@, 0),
        r@.len() >= 1,
{
    let mut out: Vec<Vec<char>> = Vec::new();
    let mut start: usize = 0;
    loop
        invariant
            start <= v@.len(),
            views(out@) + split_from(v@, start as int) == split_from(v@, 0),
        decreases v@.len() - start,
    {
        let i = scan_to_char(v, ',', start);
        if i >= v.len() {
            out.push(copy_range(v, start, v.len()));
            proof {
                assert(views(out@) =~= views(out@.drop_last()) + seq![
                    v@.subrange(start as int, v@.len() as int),
                ]);
                assert(views(out@) =~= split_from(v@, 0));
                assert(views(out@).len() >= 1);
            }
            return out;
        } else {
            out.push(copy_range(v, start, i));
            proof {
                assert(views(out@) =~= views(out@.drop_last()) + seq![
                    v@.subrange(start as int, i as int),
                ]);
                assert(views(out@) + split_from(v@, i as int + 1) =~= views(out@.drop_last())
                    + split_from(v@, start as int));
            }
            start = i + 1;
        }
    }
}

/// The pieces from index `i` on, each preceded by the separator.
pub open spec fn join_from(parts: Seq<Seq<char>>, sep: Seq<char>, i: int) -> Seq<char>
    decreases parts.len() - i,
{
    if i < 0 || i >= parts.len() {
        Seq::empty()
    } else {
        sep + parts[i] + join_from(parts, sep, i + 1)
    }
}

/// The pieces joined with the separator between neighbours.
pub open spec fn join_with(parts: Seq<Seq<char>>, sep: Seq<char>) -> Seq<char> {
    if parts.len() == 0 {
        Seq::empty()
    } else {
        parts[0] + join_from(parts, sep, 1)
    }
}

/// Joins the pieces of `parts` with `sep` between neighbours.
pub fn join_chars(parts: &Vec<Vec<char>>, sep: &Vec<char>) -> (r: Vec<char>)
    ensures
        r@ == join_with(views(parts@), sep@),
{
    if parts.len() == 0 {
        let out: Vec<char> = Vec::new();
        return out;
    }
    proof {
        assert(views(parts@)[0] == parts@[0]@);
    }
    let mut out: Vec<char> = copy_all(&parts[0]);
    let mut i: usize = 1;
    while i < parts.len()
        invariant
            1 <= i <= parts@.len(),
            out@ + join_from(views(parts@), sep@, i as int) == join_with(views(parts@), sep@),
        decreases parts@.len() - i,
    {
        let ghost prev = out@;
        let mut sc = copy_all(sep);
        out.append(&mut sc);
        let mut pc = copy_all(&parts[i]);
        out.append(&mut pc);
        proof {
            let vs = views(parts@);
            assert(vs[i as int] == parts@[i as int]@);
            assert(out@ =~= prev + sep@ + vs[i as int]);
            assert(out@ + join_from(vs, sep@, i as int + 1) =~= prev + join_from(
                vs,
                sep@,
                i as int,
            ));
        }
        i = i + 1;
    }
    proof {
        assert(out@ + join_from(views(parts@), sep@, parts@.len() as int) =~= out@);
    }
    out
}

/// A fresh copy of the whole vector.
pub fn copy_all(v: &Vec<char>) -> (r: Vec<char>)
    ensures
        r@ == v@,
{
    let r = copy_range(v, 0, v.len());
    proof {
        assert(v@.subrange(0, v@.len() as int) =~= v@);
    }
    r
}

/// Lowercases one ASCII letter; other characters pass unchanged.
pub open spec fn lower_char(c: char) -> char {
    if 'A' as u32 <= c as u32 && c as u32 <= 'Z' as u32 {
        ((c as u32 + 32) as u8) as char
    } else {
        c
    }
}

/// The text with every ASCII uppercase letter lowercased.
pub open spec fn lower_spec(s: Seq<char>) -> Seq<char> {
    s.map_values(|c: char| lower_char(c))
}

pub fn to_lower(v: &Vec<char>) -> (r: Vec<char>)
    ensures
        r@ == lower_spec(v@),
{
    let mut out: Vec<char> = Vec::new();
    let mut i: usize = 0;
    while i < v.len()
        invariant
            i <= v@.len(),
            out@ == lower_spec(v@).take(i as int),
        decreases v@.len() - i,
    {
        let c = v[i];
        let u = c as u32;
        if 65 <= u && u <= 90 {
            out.push(((u + 32) as u8) as char);
        } else {
            out.push(c);
        }
        proof {
            assert(out@ =~= lower_spec(v@).take(i as int + 1));
        }
        i = i + 1;
    }
    proof {
        assert(lower_spec(v@).take(v@.len() as int) =~= lower_spec(v@));
    }
    out
}

/// Word characters and blanks are disjoint.
pub proof fn lemma_word_not_blank(c: char)
    ensures
        is_word(c) ==> !is_blank(c),
{
}

/// The maximal word run from `i` ends exactly at `m` when everything
/// before `m` is a word character and `m` sits at the end or at a
/// non-word character.
pub proof fn lemma_word_end_is(s: Seq<char>, i: int, m: int)
    requires
        0 <= i <= m <= s.len(),
        forall|j: int| i <= j < m ==> is_word(s[j]),
        m == s.len() || !is_word(s[m]),
    ensures
        word_end(s, i) == m,
    decreases m - i,
{
    if i < m {
        lemma_word_end_is(s, i + 1, m);
    }
}

/// Whether a text carries no leading or trailing blank.
pub open spec fn is_trimmed(t: Seq<char>) -> bool {
    t.len() > 0 ==> !is_blank(t[0]) && !is_blank(t.last())
}

/// Trimming removes every leading and trailing blank.
pub proof fn lemma_trim_trimmed(s: Seq<char>)
    ensures
        is_trimmed(trim_spec(s)),
{
    lemma_blanks_end(s, 0);
    lemma_rblanks_begin(s, s.len() as int);
}

proof fn lemma_join_from_cons(x: Seq<char>, ps: Seq<Seq<char>>, sep: Seq<char>, j: int)
    requires
        0 <= j <= ps.len(),
    ensures
        join_from(seq![x] + ps, sep, j + 1) == join_from(ps, sep, j),
    decreases ps.len() - j,
{
    if j < ps.len() {
        lemma_join_from_cons(x, ps, sep, j + 1);
        assert((seq![x] + ps)[j + 1] == ps[j]);
    }
}

/// Joining a head piece onto joined pieces.
pub proof fn lemma_join_cons(x: Seq<char>, ps: Seq<Seq<char>>, sep: Seq<char>)
    ensures
        join_with(seq![x] + ps, sep) == (if ps.len() == 0 {
            x
        } else {
            x + sep + join_with(ps, sep)
        }),
{
    let parts = seq![x] + ps;
    assert(parts[0] == x);
    lemma_join_from_cons(x, ps, sep, 0);
    if ps.len() == 0 {
        assert(join_from(ps, sep, 0) =~= Seq::<char>::empty());
        assert(parts[0] + join_from(parts, sep, 1) =~= x);
    } else {
        assert(join_from(ps, sep, 0) == sep + ps[0] + join_from(ps, sep, 1));
        assert(x + sep + (ps[0] + join_from(ps, sep, 1)) =~= x + (sep + ps[0] + join_from(
            ps,
            sep,
            1,
        )));
        assert(x + sep + join_with(ps, sep) =~= x + sep + (ps[0] + join_from(ps, sep, 1)));
    }
}

/// Splitting at commas loses nothing but the delimiters: rejoining the
/// pieces with commas restores the text.
pub proof fn lemma_split_join(s: Seq<char>, start: int)
    requires
        0 <= start <= s.len(),
    ensures
        join_with(split_from(s, start), seq![',']) == s.subrange(start, s.len() as int),
    decreases s.len() - start,
{
    lemma_find_char(s, ',', start);
    let i = find_char(s, ',', start);
    if i >= s.len() {
        assert(join_with(split_from(s, start), seq![',']) == s.subrange(start, s.len() as int));
    } else {
        lemma_split_join(s, i + 1);
        lemma_join_cons(s.subrange(start, i), split_from(s, i + 1), seq![',']);
        assert(split_from(s, i + 1).len() > 0);
        assert(s.subrange(start, i) + seq![','] + s.subrange(i + 1, s.len() as int) =~= s.subrange(
            start,
            s.len() as int,
        ));
    }
}

/// The uppercase expansion of a character, as `char::to_uppercase` yields
/// it; the result depends on the character alone.
pub uninterp spec fn upper_of(c: char) -> Seq<char>;

/// Relies on `char::to_uppercase`: yields the uppercase mapping of the
/// character as one or more characters, determined by the character alone.
#[verifier::external_body]
pub fn char_upper(c: char) -> (r: Vec<char>)
    ensures
        r@ == upper_of(c),
{
    c.to_uppercase().collect()
}

/// Whether `p` is a prefix of `s`.
pub open spec fn has_prefix(s: Seq<char>, p: Seq<char>) -> bool {
    p.len() <= s.len() && s.subrange(0, p.len() as int) == p
}

/// Whether the text of `v` starts with the literal `p`.
pub fn starts_with_lit(v: &Vec<char>, p: &str) -> (r: bool)
    ensures
        r == has_prefix(v@, p@),
{
    let pc = chars_of(p);
    if pc.len() > v.len() {
        proof {
            assert(!has_prefix(v@, p@));
        }
        return false;
    }
    let mut i: usize = 0;
    while i < pc.len()
        invariant
            i <= pc@.len() <= v@.len(),
            pc@ == p@,
            forall|j: int| 0 <= j < i ==> v@[j] == p@[j],
        decreases pc@.len() - i,
    {
        if v[i] != pc[i] {
            proof {
                assert(v@.subrange(0, p@.len() as int)[i as int] == v@[i as int]);
                assert(v@.subrange(0, p@.len() as int) !~= p@);
            }
            return false;
        }
        i = i + 1;
    }
    proof {
        assert(v@.subrange(0, p@.len() as int) =~= p@);
    }
    true
}

/// Whether the text of `v` equals the literal `s`.
pub fn eq_lit(v: &Vec<char>, s: &str) -> (r: bool)
    ensures
        r == (v@ == s@),
{
    let sv = chars_of(s);
    chars_eq(v, &sv)
}

/// Character-for-character equality of two vectors.
pub fn chars_eq(a: &Vec<char>, b: &Vec<char>) -> (r: bool)
    ensures
        r == (a@ == b@),
{
    if a.len() != b.len() {
        proof {
            assert(a@ !~= b@);
        }
        return false;
    }
    let mut i: usize = 0;
    while i < a.len()
        invariant
            i <= a@.len() == b@.len(),
            forall|j: int| 0 <= j < i ==> a@[j] == b@[j],
        decreases a@.len() - i,
    {
        if a[i] != b[i] {
            proof {
                assert(a@ !~= b@);
            }
            return false;
        }
        i = i + 1;
    }
    proof {
        assert(a@ =~= b@);
    }
    true
}

} // verus!
